# car_dashboard

The tile logic of a car dashboard's slippy map, verified with Verus.

- `src/coords.rs`: tile coordinates, the tile grid of a zoom level, and the
  window of tiles that covers a view, with its keep margin.
- `src/world.rs`: the map's tiles (loaded, being fetched), resetting the view,
  finishing a fetch, changing zoom, and where loaded tiles are drawn.
- `src/url.rs`: tile addresses `{server}/{z}/{x}/{y}.png`.
- `src/tile_image.rs`: a tile server's reply turned into RGBA pixels (through
  the `image` crate).
- `src/zoom.rs`: the zoom buttons.
- `src/timer.rs`, `src/ui.rs`: the periodic refresh timer (through `i-slint-core`).
- `app/`: the Slint window, the floating-point view, network fetches and the
  async polling loop, which hand plain values to the library.
