# YanMiRestore

A read-only data recovery tool for disks, removable drives and phone
backups, whose logic is verified with Verus.

- `src/` — the verified library: partition-table discovery (MBR, EBR
  chains, GPT), NTFS MFT parsing and data runs, FAT/exFAT, ext4, APFS and
  F2FS signature probes, signature carving (JPEG, PNG, PDF, SQLite,
  Office documents, MP4), device classification, recovery planning
  (output names, segment plans, aligned raw-volume reads, destination
  safety checks), plans, reports and their text.
- `app/` — the command-line program: arguments, settings file, file and
  device I/O, progress bars, JSON reports and manifests. It feeds the
  library the bytes it asks for and acts on what the library decides.
- `tests/` — tests of the library on in-memory images and paths.
