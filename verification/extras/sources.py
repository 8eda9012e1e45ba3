"""Writes app/sources.rs: the digests of the sources that decide a measurement.

Records of analyses are kept under a fingerprint of these digests, so records of
an earlier way to measure are not read again. Run it from the root of the project
after a change to one of the sources.
"""

import hashlib
import pathlib

root = pathlib.Path(__file__).resolve().parent.parent
paths = sorted((root / "src" / "languages").glob("*.rs")) + [
    root / "src" / name
    for name in ("format.rs", "metrics.rs", "ordered.rs", "sort.rs", "text.rs")
]
lines = [
    "//! The sources that decide a measurement, each with the SHA-256 digest of its text.",
    "//! `extras/sources.py` writes this file.",
    "",
    "pub const SOURCES: &[(&str, &str)] = &[",
]
for path in paths:
    digest = hashlib.sha256(path.read_bytes()).hexdigest()
    lines += [
        "    (",
        f'        "{path.relative_to(root).as_posix()}",',
        f'        "{digest}",',
        "    ),",
    ]
lines += ["];", ""]
(root / "app" / "sources.rs").write_text("\n".join(lines))
