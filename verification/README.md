# ibtop

A terminal monitor for InfiniBand adapters. The library (`src/`) holds the
logic that is verified with Verus:

- `app_state`: the state of the interactive view (selected row, detail
  panel, tab, display unit) and how navigation and toggles change it;
- `keys`: what each key does to that state;
- `adapters`: adapters and ports, and the rows of the table they give;
- `table`: the rows of the adapter table and the port lookup of the
  detail panel;
- `format`: byte counts, sparklines, utilization bars, link-rate text;
- `text`: character classes, prefixes and trimming.

`app/` is the program around it: terminal set-up, the event loop, drawing
with ratatui, reading adapters from sysfs, and the floating-point
throughput text.
