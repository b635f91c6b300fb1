//! Checks made while installing the BSL language server from a GitHub release: which asset
//! is taken, its SHA-256 digest, where archive entries may be written, the release version,
//! download progress and the validation of the unpacked launcher.
use vstd::prelude::*;

use crate::bsl::{is_absolute_path, join_path, join_paths};
use crate::ext::{sha256, sha256_digest};
use crate::text::{
    chars_eq, chars_of, concat2, concat3, decimal, eq_ignore_ascii_case, has_prefix, owned,
    push_str, seq_contains, slice_chars, split_char, split_chars, starts_with_chars,
    str_contains, str_eq, str_eq_ignore_ascii_case, string_of, strip_leading,
    strip_leading_index, trim, trim_str, u64_to_decimal,
};

verus! {

/// Name of the official Windows distribution among the release assets.
pub const WINDOWS_ASSET_NAME: &'static str = "bsl-language-server_win.zip";

/// File name of the native launcher inside the distribution.
pub const LAUNCHER_FILE_NAME: &'static str = "bsl-language-server.exe";

/// A launcher smaller than this is taken to be damaged.
pub const MIN_LAUNCHER_BYTES: u64 = 65536;

/// A downloadable file of a release.
#[derive(Debug)]
pub struct GitHubAsset {
    pub name: String,
    pub browser_download_url: String,
    pub size: u64,
    pub digest: Option<String>,
}

/// The latest release as the GitHub API describes it.
#[derive(Debug)]
pub struct GitHubRelease {
    pub tag_name: String,
    pub assets: Vec<GitHubAsset>,
}

/// Where a download is kept until it is installed: the archive and the staging directory,
/// both removed when the installation ends.
#[derive(Debug)]
pub struct TemporaryInstallArtifacts {
    pub archive_path: String,
    pub staging_dir: String,
}

impl TemporaryInstallArtifacts {
    /// Records the two temporary locations.
    pub fn new(archive_path: String, staging_dir: String) -> (r: Self)
        ensures
            r.archive_path@ == archive_path@,
            r.staging_dir@ == staging_dir@,
    {
        TemporaryInstallArtifacts { archive_path, staging_dir }
    }
}

// ───────────────────────────── release asset ─────────────────────────────

/// `i` is the first asset named like the Windows distribution.
pub open spec fn first_windows_asset(assets: Seq<GitHubAsset>, i: int) -> bool {
    &&& 0 <= i < assets.len()
    &&& assets[i].name@ == WINDOWS_ASSET_NAME@
    &&& forall|j: int| 0 <= j < i ==> (#[trigger] assets[j]).name@ != WINDOWS_ASSET_NAME@
}

/// The official Windows distribution among the release's assets (the first one so named).
pub fn select_windows_asset(release: &GitHubRelease) -> (r: Result<&GitHubAsset, String>)
    ensures
        match r {
            Ok(a) => exists|i: int|
                first_windows_asset(release.assets@, i) && *a == #[trigger] release.assets@[i],
            Err(e) => {
                &&& forall|j: int|
                    0 <= j < release.assets@.len() ==> (#[trigger] release.assets@[j]).name@
                        != WINDOWS_ASSET_NAME@
                &&& e@ == "Could not find bsl-language-server_win.zip in the latest release"@
            },
        },
{
    let mut i: usize = 0;
    while i < release.assets.len()
        invariant
            i <= release.assets@.len(),
            forall|j: int|
                0 <= j < i ==> (#[trigger] release.assets@[j]).name@ != WINDOWS_ASSET_NAME@,
        decreases release.assets.len() - i,
    {
        if str_eq(release.assets[i].name.as_str(), WINDOWS_ASSET_NAME) {
            assert(first_windows_asset(release.assets@, i as int));
            return Ok(&release.assets[i]);
        }
        i = i + 1;
    }
    Err("Could not find bsl-language-server_win.zip in the latest release".to_owned())
}

/// The digest published for an asset, or the error that stops the installation.
pub fn asset_sha256_digest(asset: &GitHubAsset) -> (r: Result<String, String>)
    ensures
        match r {
            Ok(d) => asset.digest matches Some(x) && d@ == x@,
            Err(e) => asset.digest is None && e@ == "GitHub release asset '"@ + asset.name@
                + "' does not provide a SHA-256 digest"@,
        },
{
    match &asset.digest {
        Some(d) => Ok(d.clone()),
        None => Err(
            concat3(
                "GitHub release asset '",
                asset.name.as_str(),
                "' does not provide a SHA-256 digest",
            ),
        ),
    }
}

// ───────────────────────────── checksum ─────────────────────────────

/// Lower-case hexadecimal digit of a value below 16.
pub open spec fn hex_digit(n: int) -> char {
    if n < 10 {
        (('0' as int) + n) as char
    } else {
        (('a' as int) + n - 10) as char
    }
}

/// Two lower-case hexadecimal digits per byte, in order (the `{:x}` form of a digest).
pub open spec fn hex_of(bytes: Seq<u8>) -> Seq<char>
    decreases bytes.len(),
{
    if bytes.len() == 0 {
        Seq::empty()
    } else {
        hex_of(bytes.drop_last()) + seq![
            hex_digit(bytes.last() as int / 16),
            hex_digit(bytes.last() as int % 16),
        ]
    }
}

fn hex_char(n: u8) -> (c: char)
    requires
        n < 16,
    ensures
        c == hex_digit(n as int),
{
    if n < 10 {
        ((('0' as u8) + n) as char)
    } else {
        ((('a' as u8) + n - 10) as char)
    }
}

/// Lower-case hexadecimal text of a byte sequence.
pub fn lower_hex(bytes: &[u8]) -> (r: String)
    ensures
        r@ == hex_of(bytes@),
{
    let mut out: Vec<char> = Vec::new();
    let mut i: usize = 0;
    while i < bytes.len()
        invariant
            i <= bytes@.len(),
            out@ == hex_of(bytes@.subrange(0, i as int)),
        decreases bytes.len() - i,
    {
        let b = bytes[i];
        let ghost pre = bytes@.subrange(0, i + 1);
        assert(pre.drop_last() =~= bytes@.subrange(0, i as int));
        out.push(hex_char(b / 16));
        out.push(hex_char(b % 16));
        i = i + 1;
        assert(out@ =~= hex_of(pre));
    }
    assert(bytes@.subrange(0, bytes.len() as int) =~= bytes@);
    string_of(&out)
}

/// Outcome of comparing a computed hexadecimal digest with a published `sha256:` digest:
/// equal up to ASCII case, or the error message.
pub open spec fn digest_check(actual: Seq<char>, digest: Seq<char>) -> Result<(), Seq<char>> {
    if !has_prefix(digest, "sha256:"@) {
        Err("Unsupported release asset digest: "@ + digest)
    } else {
        let expected = digest.subrange(7, digest.len() as int);
        if eq_ignore_ascii_case(actual, expected) {
            Ok(())
        } else {
            Err("BSL Language Server checksum mismatch: expected "@ + expected + ", got "@
                + actual)
        }
    }
}

/// Compares a computed hexadecimal digest with the release's published `sha256:` digest.
pub fn verify_digest_hex(actual: &str, digest: &str) -> (r: Result<(), String>)
    ensures
        match r {
            Ok(()) => digest_check(actual@, digest@) == Ok::<(), Seq<char>>(()),
            Err(e) => digest_check(actual@, digest@) == Err::<(), Seq<char>>(e@),
        },
{
    let dv = chars_of(digest);
    let prefix = chars_of("sha256:");
    proof {
        reveal_strlit("sha256:");
    }
    if !starts_with_chars(&dv, &prefix) {
        return Err(concat2("Unsupported release asset digest: ", digest));
    }
    let expected = string_of(&slice_chars(&dv, 7, dv.len()));
    if str_eq_ignore_ascii_case(actual, expected.as_str()) {
        Ok(())
    } else {
        let mut m = concat3(
            "BSL Language Server checksum mismatch: expected ",
            expected.as_str(),
            ", got ",
        );
        push_str(&mut m, actual);
        Err(m)
    }
}

/// Checks downloaded bytes against the release's published `sha256:` digest.
pub fn verify_asset_digest(bytes: &[u8], digest: &str) -> (r: Result<(), String>)
    ensures
        match r {
            Ok(()) => digest_check(hex_of(sha256_digest(bytes@)), digest@) == Ok::<
                (),
                Seq<char>,
            >(()),
            Err(e) => digest_check(hex_of(sha256_digest(bytes@)), digest@) == Err::<
                (),
                Seq<char>,
            >(e@),
        },
{
    let d = sha256(bytes);
    let actual = lower_hex(&d);
    verify_digest_hex(actual.as_str(), digest)
}

// ───────────────────────────── archive entries ─────────────────────────────

/// The components of an entry path that name something: empty pieces and `.` dropped.
pub open spec fn normal_parts(parts: Seq<Seq<char>>) -> Seq<Seq<char>>
    decreases parts.len(),
{
    if parts.len() == 0 {
        Seq::empty()
    } else {
        let r = normal_parts(parts.drop_last());
        if parts.last().len() > 0 && parts.last() != "."@ {
            r.push(parts.last())
        } else {
            r
        }
    }
}

/// A path component that starts with a drive prefix: an ASCII letter followed by `:`.
pub open spec fn has_drive_prefix(part: Seq<char>) -> bool {
    part.len() >= 2 && (('a' <= part[0] && part[0] <= 'z') || ('A' <= part[0] && part[0] <= 'Z'))
        && part[1] == ':'
}

/// An archive entry that could be written outside the installation directory: it holds a
/// backslash, starts at the root, or has a `..` component or a component with a drive prefix.
pub open spec fn entry_is_unsafe(entry: Seq<char>) -> bool {
    ||| seq_contains(entry, "\\"@)
    ||| is_absolute_path(entry)
    ||| exists|k: int|
        0 <= k < split_char(entry, '/').len() && #[trigger] split_char(entry, '/')[k] == ".."@
    ||| exists|k: int|
        0 <= k < split_char(entry, '/').len() && has_drive_prefix(#[trigger] split_char(entry, '/')[k])
}

/// The segments joined with `/`.
pub open spec fn slash_joined(parts: Seq<Seq<char>>) -> Seq<char>
    decreases parts.len(),
{
    if parts.len() == 0 {
        Seq::empty()
    } else if parts.len() == 1 {
        parts[0]
    } else {
        slash_joined(parts.drop_last()) + "/"@ + parts.last()
    }
}

/// Where an archive entry is written under `base_dir`, or why it is refused.
pub open spec fn archive_destination(base_dir: Seq<char>, entry: Seq<char>) -> Result<
    Seq<char>,
    Seq<char>,
> {
    if entry_is_unsafe(entry) {
        Err("Unsafe archive entry: "@ + entry)
    } else if normal_parts(split_char(entry, '/')).len() == 0 {
        Err("Archive entry path is empty"@)
    } else {
        Ok(join_path(base_dir, slash_joined(normal_parts(split_char(entry, '/')))))
    }
}

proof fn lemma_normal_parts_push(parts: Seq<Seq<char>>, p: Seq<char>)
    ensures
        normal_parts(parts.push(p)) == (if p.len() > 0 && p != "."@ {
            normal_parts(parts).push(p)
        } else {
            normal_parts(parts)
        }),
{
    assert(parts.push(p).drop_last() =~= parts);
}

/// Path an archive entry is extracted to under `base_dir`; entries that could escape it
/// are refused.
pub fn safe_archive_destination(base_dir: &str, entry_name: &str) -> (r: Result<String, String>)
    ensures
        match r {
            Ok(p) => archive_destination(base_dir@, entry_name@) == Ok::<Seq<char>, Seq<char>>(
                p@,
            ),
            Err(e) => archive_destination(base_dir@, entry_name@) == Err::<Seq<char>, Seq<char>>(
                e@,
            ),
        },
{
    proof {
        reveal_strlit("\\");
        reveal_strlit("..");
        reveal_strlit(".");
        reveal_strlit("/");
    }
    let ev = chars_of(entry_name);
    if str_contains(entry_name, "\\") || (ev.len() > 0 && ev[0] == '/') {
        return Err(concat2("Unsafe archive entry: ", entry_name));
    }
    let parts = split_chars(&ev, '/');
    let ghost ps = parts@.map_values(|v: Vec<char>| v@);
    let dots = chars_of("..");
    let dot = chars_of(".");
    let mut kept: Vec<Vec<char>> = Vec::new();
    let mut i: usize = 0;
    while i < parts.len()
        invariant
            i <= parts@.len(),
            ps == parts@.map_values(|v: Vec<char>| v@),
            ps == split_char(ev@, '/'),
            ev@ == entry_name@,
            dots@ == ".."@,
            dot@ == "."@,
            forall|k: int| 0 <= k < i ==> #[trigger] ps[k] != ".."@,
            forall|k: int| 0 <= k < i ==> !has_drive_prefix(#[trigger] ps[k]),
            kept@.map_values(|v: Vec<char>| v@) == normal_parts(ps.subrange(0, i as int)),
        decreases parts.len() - i,
    {
        assert(ps[i as int] == parts@[i as int]@);
        if chars_eq(&parts[i], &dots) {
            assert(entry_is_unsafe(entry_name@));
            return Err(concat2("Unsafe archive entry: ", entry_name));
        }
        let part = &parts[i];
        if part.len() >= 2 && ((('a' <= part[0] && part[0] <= 'z') || ('A' <= part[0] && part[0] <= 'Z'))
            && part[1] == ':') {
            assert(has_drive_prefix(ps[i as int]));
            assert(entry_is_unsafe(entry_name@));
            return Err(concat2("Unsafe archive entry: ", entry_name));
        }
        let ghost before = kept@.map_values(|v: Vec<char>| v@);
        proof {
            lemma_normal_parts_push(ps.subrange(0, i as int), ps[i as int]);
            assert(ps.subrange(0, i as int).push(ps[i as int]) =~= ps.subrange(0, i + 1));
        }
        if parts[i].len() > 0 && !chars_eq(&parts[i], &dot) {
            assert(parts@[i as int]@.subrange(0, parts@[i as int]@.len() as int) =~= parts@[i as int]@);
            kept.push(slice_chars(&parts[i], 0, parts[i].len()));
            assert(kept@.map_values(|v: Vec<char>| v@) =~= before.push(ps[i as int]));
        }
        i = i + 1;
    }
    assert(ps.subrange(0, parts.len() as int) =~= ps);
    let ghost np = kept@.map_values(|v: Vec<char>| v@);
    assert(!entry_is_unsafe(entry_name@));
    if kept.len() == 0 {
        return Err("Archive entry path is empty".to_owned());
    }
    assert(np[0] == kept@[0]@);
    let mut rel = string_of(&kept[0]);
    let mut k: usize = 1;
    while k < kept.len()
        invariant
            1 <= k <= kept@.len(),
            np == kept@.map_values(|v: Vec<char>| v@),
            rel@ == slash_joined(np.subrange(0, k as int)),
        decreases kept.len() - k,
    {
        let ghost pre = np.subrange(0, k + 1);
        assert(pre.drop_last() =~= np.subrange(0, k as int));
        assert(pre.last() == kept@[k as int]@);
        push_str(&mut rel, "/");
        let piece = string_of(&kept[k]);
        push_str(&mut rel, piece.as_str());
        k = k + 1;
    }
    assert(np.subrange(0, kept.len() as int) =~= np);
    Ok(join_paths(base_dir, rel.as_str()))
}

// ───────────────────────────── release version ─────────────────────────────

/// A char allowed in a release version: ASCII letter or digit, `.`, `-` or `_`.
pub open spec fn version_char(c: char) -> bool {
    ('a' <= c && c <= 'z') || ('A' <= c && c <= 'Z') || ('0' <= c && c <= '9') || c == '.'
        || c == '-' || c == '_'
}

/// The version named by a release tag: trimmed, leading `v`s dropped, and refused unless it
/// is non-empty and made of version chars only.
pub open spec fn release_version(tag: Seq<char>) -> Result<Seq<char>, Seq<char>> {
    let v = strip_leading(trim(tag), "v"@);
    if v.len() == 0 || exists|k: int| 0 <= k < v.len() && !version_char(#[trigger] v[k]) {
        Err("Unsafe BSL Language Server release tag: "@ + tag)
    } else {
        Ok(v)
    }
}

/// The version to install, taken from the release tag.
pub fn sanitized_release_version(tag_name: &str) -> (r: Result<String, String>)
    ensures
        match r {
            Ok(v) => release_version(tag_name@) == Ok::<Seq<char>, Seq<char>>(v@),
            Err(e) => release_version(tag_name@) == Err::<Seq<char>, Seq<char>>(e@),
        },
{
    let t = trim_str(tag_name);
    let tv = chars_of(t.as_str());
    let vee = chars_of("v");
    let start = strip_leading_index(&tv, &vee);
    let v = slice_chars(&tv, start, tv.len());
    assert(v@ == strip_leading(trim(tag_name@), "v"@));
    if v.len() == 0 {
        return Err(concat2("Unsafe BSL Language Server release tag: ", tag_name));
    }
    let mut i: usize = 0;
    while i < v.len()
        invariant
            i <= v@.len(),
            v@ == strip_leading(trim(tag_name@), "v"@),
            forall|k: int| 0 <= k < i ==> version_char(#[trigger] v@[k]),
        decreases v.len() - i,
    {
        let c = v[i];
        if !(('a' <= c && c <= 'z') || ('A' <= c && c <= 'Z') || ('0' <= c && c <= '9') || c
            == '.' || c == '-' || c == '_') {
            assert(!version_char(v@[i as int]));
            return Err(concat2("Unsafe BSL Language Server release tag: ", tag_name));
        }
        i = i + 1;
    }
    Ok(string_of(&v))
}

// ───────────────────────────── download ─────────────────────────────

/// Progress of the download as shown in the settings window.
#[derive(Debug, Clone, Copy)]
pub struct DownloadProgress {
    pub progress: u64,
    pub total: u64,
    pub percent: u64,
}

/// Whole percent of `total` that `downloaded` bytes make (0 when the size is unknown).
pub open spec fn percent_of(downloaded: int, total: int) -> int {
    if total > 0 {
        downloaded * 100 / total
    } else {
        0
    }
}

/// Bytes received so far and the percentage last reported.
#[derive(Debug, Clone, Copy)]
pub struct DownloadProgressTracker {
    pub total: u64,
    pub downloaded: u64,
    pub last_percent: u64,
}

impl DownloadProgressTracker {
    /// The reported percentage never exceeds a hundred times the bytes received.
    pub open spec fn wf(&self) -> bool {
        self.last_percent <= self.downloaded * 100
    }

    /// Nothing received yet.
    pub fn new(total: u64) -> (t: Self)
        ensures
            t.wf(),
            t.total == total,
            t.downloaded == 0,
            t.last_percent == 0,
    {
        DownloadProgressTracker { total, downloaded: 0, last_percent: 0 }
    }

    /// Records a received chunk of `len` bytes; the progress is reported when the
    /// percentage has grown by five or more since it was last reported.
    pub fn record_chunk(&mut self, len: u64) -> (r: Option<DownloadProgress>)
        requires
            old(self).wf(),
            (old(self).downloaded + len) * 100 + 5 <= u64::MAX,
        ensures
            final(self).wf(),
            final(self).total == old(self).total,
            final(self).downloaded == old(self).downloaded + len,
            ({
                let p = percent_of(final(self).downloaded as int, old(self).total as int);
                if p >= old(self).last_percent + 5 {
                    &&& r == Some(
                        DownloadProgress {
                            progress: final(self).downloaded,
                            total: old(self).total,
                            percent: p as u64,
                        },
                    )
                    &&& final(self).last_percent == p
                } else {
                    &&& r is None
                    &&& final(self).last_percent == old(self).last_percent
                }
            }),
    {
        self.downloaded = self.downloaded + len;
        let percent = if self.total > 0 {
            let ghost d: int = self.downloaded * 100;
            let ghost t: int = self.total as int;
            assert(d / t <= d) by (nonlinear_arith)
                requires
                    t > 0,
                    d >= 0,
            ;
            (self.downloaded * 100) / self.total
        } else {
            0
        };
        if percent >= self.last_percent + 5 {
            self.last_percent = percent;
            Some(DownloadProgress { progress: self.downloaded, total: self.total, percent })
        } else {
            None
        }
    }

    /// The final progress once every byte arrived, or the size mismatch that stops the
    /// installation.
    pub fn finish(&self) -> (r: Result<DownloadProgress, String>)
        ensures
            match r {
                Ok(p) => self.downloaded == self.total && p == DownloadProgress {
                    progress: self.total,
                    total: self.total,
                    percent: 100,
                },
                Err(e) => self.downloaded != self.total && e@
                    == "BSL Language Server download size mismatch: expected "@ + decimal(
                    self.total as nat,
                ) + ", got "@ + decimal(self.downloaded as nat),
            },
    {
        if self.downloaded != self.total {
            let t = u64_to_decimal(self.total);
            let d = u64_to_decimal(self.downloaded);
            let mut m = concat3(
                "BSL Language Server download size mismatch: expected ",
                t.as_str(),
                ", got ",
            );
            push_str(&mut m, d.as_str());
            return Err(m);
        }
        Ok(DownloadProgress { progress: self.total, total: self.total, percent: 100 })
    }
}

/// Error reported when the GitHub API refuses the release request; `status_text` is the
/// status as HTTP prints it (`403 Forbidden`).
pub open spec fn release_api_error(status: u16, status_text: Seq<char>, body: Seq<char>) -> Seq<
    char,
> {
    "GitHub API вернул ошибку "@ + status_text + (if status == 403 || seq_contains(
        body,
        "rate limit"@,
    ) {
        " (GitHub API rate limit — попробуйте позже или скачайте JAR вручную)"@
    } else {
        Seq::empty()
    }) + "\nСкачайте JAR вручную: https://github.com/1c-syntax/bsl-language-server/releases/latest"@
}

/// Message for a failed release request.
pub fn github_release_error_message(status: u16, status_text: &str, body: &str) -> (r: String)
    ensures
        r@ == release_api_error(status, status_text@, body@),
{
    let mut m = concat2("GitHub API вернул ошибку ", status_text);
    if status == 403 || str_contains(body, "rate limit") {
        push_str(&mut m, " (GitHub API rate limit — попробуйте позже или скачайте JAR вручную)");
    } else {
        assert(m@ + Seq::<char>::empty() =~= m@);
    }
    push_str(
        &mut m,
        "\nСкачайте JAR вручную: https://github.com/1c-syntax/bsl-language-server/releases/latest",
    );
    m
}

// ───────────────────────────── launcher ─────────────────────────────

/// Whether an extracted file is the native launcher (name compared ignoring ASCII case).
pub fn is_launcher_file_name(name: &str) -> (b: bool)
    ensures
        b == eq_ignore_ascii_case(name@, LAUNCHER_FILE_NAME@),
{
    str_eq_ignore_ascii_case(name, LAUNCHER_FILE_NAME)
}

/// Refuses a launcher file smaller than 64 KiB; `path` is how the file is shown.
pub fn check_launcher_size(path: &str, len: u64) -> (r: Result<(), String>)
    ensures
        match r {
            Ok(()) => len >= MIN_LAUNCHER_BYTES,
            Err(e) => len < MIN_LAUNCHER_BYTES && e@ == "BSL Language Server launcher '"@ + path@
                + "' is unexpectedly small"@,
        },
{
    if len < MIN_LAUNCHER_BYTES {
        Err(concat3("BSL Language Server launcher '", path, "' is unexpectedly small"))
    } else {
        Ok(())
    }
}

/// Outcome of the launcher's `version` command: its stdout and stderr, joined by a line
/// break, must mention the release version.
pub open spec fn launcher_version_check(stdout: Seq<char>, stderr: Seq<char>, expected: Seq<char>) -> Result<
    (),
    Seq<char>,
> {
    let out = stdout + "\n"@ + stderr;
    if seq_contains(out, expected) {
        Ok(())
    } else {
        Err("Installed BSL Language Server version does not match release "@ + expected + ": "@
            + trim(out))
    }
}

/// Checks that the launcher reports the release version.
pub fn check_launcher_version_output(stdout: &str, stderr: &str, expected_version: &str) -> (r:
    Result<(), String>)
    ensures
        match r {
            Ok(()) => launcher_version_check(stdout@, stderr@, expected_version@) == Ok::<
                (),
                Seq<char>,
            >(()),
            Err(e) => launcher_version_check(stdout@, stderr@, expected_version@) == Err::<
                (),
                Seq<char>,
            >(e@),
        },
{
    let out = concat3(stdout, "\n", stderr);
    if str_contains(out.as_str(), expected_version) {
        return Ok(());
    }
    let mut m = concat3(
        "Installed BSL Language Server version does not match release ",
        expected_version,
        ": ",
    );
    let t = trim_str(out.as_str());
    push_str(&mut m, t.as_str());
    Err(m)
}

} // verus!
