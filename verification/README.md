# autofilm

A media-library poster generator for Jellyfin and Emby servers, with its
decisions verified by Verus.

- `src/` is the verified library: resolutions and their written form, media
  metadata and the choice of poster images, file names and output paths,
  the theme color and title color of a poster, text wrapping and the
  placement of title blocks, pixel-level
  helpers (rounded corners, opacity, visible bounds, shadow silhouettes), the
  card stack plan, the media-server client setup and request paths, the
  loading of a task's fonts, the step-by-step `LibraryJob` that drives the
  making of one library's poster, and the `TaskRun` that goes through a
  task's libraries.
- `app/` is the program around it: configuration loading, HTTP requests,
  the floating-point drawing of the four poster styles, and the cron
  scheduler.
- `tests/` runs the library on concrete values.
