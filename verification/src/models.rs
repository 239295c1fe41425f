//! Model downloads: the checksum of the received bytes, where the result
//! goes, and the progress lines printed on the command line. The caller
//! performs the transfer and the file operations.
use vstd::prelude::*;
use crate::config::models::spec_is_tar_gz;
use crate::config::schema::opt_view;
use crate::setup::{bytes_text, format_bytes};
use crate::state::{join_path, path_join};
use crate::text::{chars_eq, chars_of, push_all, string_of, string_views, trim, trim_chars};

verus! {

#[verifier::external_type_specification]
#[verifier::external_body]
pub struct ExSha256(sha2::Sha256);

/// The bytes a SHA-256 hasher has been fed so far.
pub uninterp spec fn sha256_input(h: sha2::Sha256) -> Seq<u8>;

/// The SHA-256 digest of a byte sequence.
pub uninterp spec fn sha256_digest(data: Seq<u8>) -> Seq<u8>;

/// A hasher that has been fed nothing.
/// Trusted: `sha2::Digest::new` for `Sha256` (the default state).
#[verifier::external_body]
fn sha256_new() -> (h: sha2::Sha256)
    ensures
        sha256_input(h) == Seq::<u8>::empty(),
{
    <sha2::Sha256 as sha2::Digest>::new()
}

/// Feeds `data` to the hasher.
/// Trusted: `sha2::Digest::update`, which appends `data` to the input.
#[verifier::external_body]
fn sha256_update(h: &mut sha2::Sha256, data: &[u8])
    ensures
        sha256_input(*final(h)) == sha256_input(*old(h)) + data@,
{
    sha2::Digest::update(h, data)
}

/// The digest of everything fed, 32 bytes.
/// Trusted: `sha2::Digest::finalize`, whose output type holds 32 bytes for
/// `Sha256`; the bytes themselves are named, not described.
#[verifier::external_body]
fn sha256_finalize(h: sha2::Sha256) -> (r: Vec<u8>)
    ensures
        r@ == sha256_digest(sha256_input(h)),
        r@.len() == 32,
{
    sha2::Digest::finalize(h).to_vec()
}

/// What a download has received so far: the byte count, the size the
/// server announced (0 when unknown), and the running checksum.
pub struct DownloadTally {
    hasher: sha2::Sha256,
    downloaded: u64,
    total: u64,
}

impl DownloadTally {
    /// The bytes received so far.
    pub closed spec fn received(&self) -> Seq<u8> {
        sha256_input(self.hasher)
    }

    pub closed spec fn downloaded_spec(&self) -> u64 {
        self.downloaded
    }

    pub closed spec fn total_spec(&self) -> u64 {
        self.total
    }

    pub fn new(total: u64) -> (r: DownloadTally)
        ensures
            r.received() == Seq::<u8>::empty(),
            r.downloaded_spec() == 0,
            r.total_spec() == total,
    {
        DownloadTally { hasher: sha256_new(), downloaded: 0, total }
    }

    pub fn downloaded(&self) -> (r: u64)
        ensures
            r == self.downloaded_spec(),
    {
        self.downloaded
    }

    pub fn total(&self) -> (r: u64)
        ensures
            r == self.total_spec(),
    {
        self.total
    }

    /// Accounts for one chunk of the body.
    pub fn on_chunk(&mut self, chunk: &[u8])
        requires
            old(self).downloaded_spec() + chunk@.len() <= u64::MAX,
        ensures
            final(self).received() == old(self).received() + chunk@,
            final(self).downloaded_spec() == old(self).downloaded_spec() + chunk@.len(),
            final(self).total_spec() == old(self).total_spec(),
    {
        sha256_update(&mut self.hasher, chunk);
        self.downloaded = self.downloaded + chunk.len() as u64;
    }

    /// The digest of everything received.
    pub fn finish(self) -> (r: Vec<u8>)
        ensures
            r@ == sha256_digest(self.received()),
            r@.len() == 32,
    {
        sha256_finalize(self.hasher)
    }
}

/// A lowercase hexadecimal digit.
pub open spec fn hex_digit(d: nat) -> char {
    if d < 10 {
        ((d as int) + ('0' as int)) as char
    } else {
        ((d as int) - 10 + ('a' as int)) as char
    }
}

/// Bytes as lowercase hexadecimal, two digits each.
pub open spec fn hex(bytes: Seq<u8>) -> Seq<char>
    decreases bytes.len(),
{
    if bytes.len() == 0 {
        Seq::empty()
    } else {
        let b = bytes.last();
        hex(bytes.drop_last()) + seq![hex_digit((b / 16) as nat), hex_digit((b % 16) as nat)]
    }
}

fn hex_digit_exec(d: u8) -> (c: char)
    requires
        d < 16,
    ensures
        c == hex_digit(d as nat),
{
    if d < 10 {
        (48u8 + d) as char
    } else {
        (87u8 + d) as char
    }
}

pub fn hex_string(bytes: &[u8]) -> (r: String)
    ensures
        r@ == hex(bytes@),
{
    let mut out: Vec<char> = Vec::new();
    let mut i: usize = 0;
    assert(bytes@.take(0) =~= Seq::<u8>::empty());
    while i < bytes.len()
        invariant
            i <= bytes@.len(),
            out@ == hex(bytes@.take(i as int)),
        decreases bytes@.len() - i,
    {
        assert(bytes@.take(i as int + 1).drop_last() =~= bytes@.take(i as int));
        let b = bytes[i];
        out.push(hex_digit_exec(b / 16));
        out.push(hex_digit_exec(b % 16));
        i = i + 1;
    }
    assert(bytes@.take(bytes@.len() as int) =~= bytes@);
    string_of(out.as_slice())
}

/// A download whose checksum differs from the one the catalog expects.
#[derive(Debug)]
pub struct ChecksumMismatch {
    pub name: String,
    pub expected: String,
    pub actual: String,
}

impl ChecksumMismatch {
    pub fn message(&self) -> (r: String)
        ensures
            r@ == "sha256 mismatch for "@ + self.name@ + "; expected "@ + self.expected@
                + ", got "@ + self.actual@,
    {
        let mut m = chars_of("sha256 mismatch for ");
        push_all(&mut m, chars_of(self.name.as_str()).as_slice());
        push_all(&mut m, chars_of("; expected ").as_slice());
        push_all(&mut m, chars_of(self.expected.as_str()).as_slice());
        push_all(&mut m, chars_of(", got ").as_slice());
        push_all(&mut m, chars_of(self.actual.as_str()).as_slice());
        string_of(m.as_slice())
    }
}

/// Accepts a digest when the catalog expects none, or expects it (written
/// in lowercase hexadecimal, surrounding whitespace ignored).
pub fn check_checksum(name: &str, expected: &Option<String>, digest: &[u8]) -> (r: Result<
    (),
    ChecksumMismatch,
>)
    ensures
        match opt_view(*expected) {
            None => r is Ok,
            Some(e) => match r {
                Ok(()) => trim(e) == hex(digest@),
                Err(m) => trim(e) != hex(digest@) && m.name@ == name@ && m.expected@ == e
                    && m.actual@ == hex(digest@),
            },
        },
{
    match expected {
        None => Ok(()),
        Some(e) => {
            let actual = hex_string(digest);
            let t = trim_chars(chars_of(e.as_str()).as_slice());
            if chars_eq(t.as_slice(), chars_of(actual.as_str()).as_slice()) {
                Ok(())
            } else {
                Err(ChecksumMismatch { name: name.to_owned(), expected: e.clone(), actual })
            }
        },
    }
}

/// Where a finished download goes: an archive is unpacked into the
/// directory named after the model, any other file is moved to that name.
#[derive(Debug, Clone, PartialEq, Eq)]
pub enum Destination {
    Extract { dir: String },
    Move { file: String },
}

pub fn download_destination(url: &str, models_dir: &str, name: &str) -> (r: Destination)
    ensures
        if spec_is_tar_gz(url@) {
            r matches Destination::Extract { dir } && dir@ == path_join(models_dir@, name@)
        } else {
            r matches Destination::Move { file } && file@ == path_join(models_dir@, name@)
        },
{
    let target = join_path(models_dir, name);
    if crate::config::models::is_tar_gz(url) {
        Destination::Extract { dir: target }
    } else {
        Destination::Move { file: target }
    }
}

/// Why a download cannot start.
#[derive(Debug)]
pub enum DownloadError {
    /// The model name is empty.
    EmptyName,
    /// The catalog has no model of that name.
    Unknown(crate::config::models::CatalogError),
}

impl DownloadError {
    pub fn message(&self) -> (r: String)
        ensures
            r@ == match self {
                DownloadError::EmptyName => "model name must not be empty"@,
                DownloadError::Unknown(e) => crate::config::models::catalog_message(
                    e.name@,
                    string_views(e.available@),
                ),
            },
    {
        match self {
            DownloadError::EmptyName => "model name must not be empty".to_string(),
            DownloadError::Unknown(e) => e.message(),
        }
    }
}

/// The catalog entry to download for `name`.
pub fn download_entry(
    config: &crate::config::models::ModelConfig,
    name: &str,
) -> (r: Result<crate::config::models::ModelEntry, DownloadError>)
    ensures
        match r {
            Ok(e) => name@.len() > 0 && crate::config::models::lookup(config@, name@) == Some(e@),
            Err(DownloadError::EmptyName) => name@.len() == 0,
            Err(DownloadError::Unknown(err)) => name@.len() > 0 && crate::config::models::lookup(
                config@,
                name@,
            ) is None && err.name@ == name@ && string_views(err.available@)
                == crate::config::models::model_names(config@.models),
        },
{
    if chars_of(name).len() == 0 {
        return Err(DownloadError::EmptyName);
    }
    match crate::config::models::catalog_entry(config, name) {
        Ok(e) => Ok(e),
        Err(e) => Err(DownloadError::Unknown(e)),
    }
}

/// Bytes between two progress lines when the size is unknown.
pub const CLI_DOWNLOAD_PROGRESS_STEP_BYTES: u64 = 268435456;

/// About five progress lines for a download of `total` bytes, but never
/// more often than every 256 MiB.
pub open spec fn progress_step(total: nat) -> nat {
    if total == 0 {
        CLI_DOWNLOAD_PROGRESS_STEP_BYTES as nat
    } else {
        let fifth = (total + 4) / 5;
        if fifth > CLI_DOWNLOAD_PROGRESS_STEP_BYTES {
            fifth
        } else {
            CLI_DOWNLOAD_PROGRESS_STEP_BYTES as nat
        }
    }
}

pub fn download_progress_step(total: u64) -> (r: u64)
    ensures
        r as nat == progress_step(total as nat),
{
    if total == 0 {
        CLI_DOWNLOAD_PROGRESS_STEP_BYTES
    } else {
        let fifth = total / 5 + if total % 5 == 0 {
            0
        } else {
            1
        };
        assert(fifth == (total + 4) / 5);
        if fifth > CLI_DOWNLOAD_PROGRESS_STEP_BYTES {
            fifth
        } else {
            CLI_DOWNLOAD_PROGRESS_STEP_BYTES
        }
    }
}

/// `a + b`, or `u64::MAX` when that is larger.
pub open spec fn sat_add(a: nat, b: nat) -> nat {
    if a + b > u64::MAX {
        u64::MAX as nat
    } else {
        a + b
    }
}

/// The next threshold after `next` is pushed, `step` at a time, past
/// `downloaded`.
pub open spec fn advance(next: nat, step: nat, downloaded: nat) -> nat
    decreases downloaded - next,
{
    if step == 0 || next > downloaded || next >= u64::MAX {
        next
    } else {
        let n2 = sat_add(next, step);
        if n2 > downloaded {
            n2
        } else {
            advance(n2, step, downloaded)
        }
    }
}

/// A progress line of the command-line download.
#[derive(Debug, Clone, Copy, PartialEq, Eq)]
pub enum ProgressLine {
    /// The size of the download, once known.
    Size(u64),
    /// Bytes received, the size being unknown.
    Received(u64),
    /// Bytes received out of the size.
    Fraction(u64, u64),
}

/// The command-line reporter of a download: prints each phase once, the
/// size, and progress at thresholds.
#[derive(Debug, Clone)]
pub struct CliDownloadProgress {
    pub model: String,
    pub models_dir: String,
    pub last_phase: Option<String>,
    pub next_report_at: u64,
    pub last_reported_bytes: u64,
}

/// The line printed when a phase starts.
pub open spec fn phase_line(phase: Seq<char>, model: Seq<char>, models_dir: Seq<char>) -> Seq<char> {
    if phase == "Downloading model..."@ {
        "Downloading model `"@ + model + "` into "@ + models_dir
    } else if phase == "Extracting model..."@ {
        "Extracting model archive..."@
    } else if phase == "Finishing setup..."@ {
        "Saving model configuration..."@
    } else {
        phase
    }
}

impl CliDownloadProgress {
    pub fn new(model: &str, models_dir: &str) -> (r: CliDownloadProgress)
        ensures
            r.model@ == model@,
            r.models_dir@ == models_dir@,
            r.last_phase is None,
            r.next_report_at == 0,
            r.last_reported_bytes == 0,
    {
        CliDownloadProgress {
            model: model.to_owned(),
            models_dir: models_dir.to_owned(),
            last_phase: None,
            next_report_at: 0,
            last_reported_bytes: 0,
        }
    }

    /// The line to print for a phase, unless it is the phase already
    /// announced.
    pub fn on_phase(&mut self, phase: &str) -> (r: Option<String>)
        ensures
            final(self).model == old(self).model,
            final(self).models_dir == old(self).models_dir,
            final(self).next_report_at == old(self).next_report_at,
            final(self).last_reported_bytes == old(self).last_reported_bytes,
            if opt_view(old(self).last_phase) == Some(phase@) {
                r is None && opt_view(final(self).last_phase) == opt_view(old(self).last_phase)
            } else {
                r matches Some(line) && line@ == phase_line(
                    phase@,
                    old(self).model@,
                    old(self).models_dir@,
                ) && opt_view(final(self).last_phase) == Some(phase@)
            },
    {
        let p = chars_of(phase);
        if let Some(last) = &self.last_phase {
            if chars_eq(chars_of(last.as_str()).as_slice(), p.as_slice()) {
                return None;
            }
        }
        let line = if chars_eq(p.as_slice(), chars_of("Downloading model...").as_slice()) {
            let mut m = chars_of("Downloading model `");
            push_all(&mut m, chars_of(self.model.as_str()).as_slice());
            push_all(&mut m, chars_of("` into ").as_slice());
            push_all(&mut m, chars_of(self.models_dir.as_str()).as_slice());
            string_of(m.as_slice())
        } else if chars_eq(p.as_slice(), chars_of("Extracting model...").as_slice()) {
            "Extracting model archive...".to_string()
        } else if chars_eq(p.as_slice(), chars_of("Finishing setup...").as_slice()) {
            "Saving model configuration...".to_string()
        } else {
            phase.to_owned()
        };
        self.last_phase = Some(phase.to_owned());
        Some(line)
    }

    /// The line to print, if any, when `downloaded` of `total` bytes (0
    /// when unknown) have arrived. With a known size, `u64::MAX` received
    /// bytes would never pass the next threshold, so it is left out.
    pub fn on_progress(&mut self, downloaded: u64, total: u64) -> (r: Option<ProgressLine>)
        requires
            total == 0 || downloaded < u64::MAX,
        ensures
            final(self).model == old(self).model,
            final(self).models_dir == old(self).models_dir,
            final(self).last_phase == old(self).last_phase,
            ({
                let next = old(self).next_report_at;
                let last = old(self).last_reported_bytes;
                if total == 0 {
                    if downloaded == 0 {
                        r is None && final(self).next_report_at == CLI_DOWNLOAD_PROGRESS_STEP_BYTES
                            && final(self).last_reported_bytes == 0
                    } else if downloaded >= next {
                        r == Some(ProgressLine::Received(downloaded))
                            && final(self).last_reported_bytes == downloaded
                            && final(self).next_report_at as nat == sat_add(
                            downloaded as nat,
                            CLI_DOWNLOAD_PROGRESS_STEP_BYTES as nat,
                        )
                    } else {
                        r is None && final(self).next_report_at == next
                            && final(self).last_reported_bytes == last
                    }
                } else if downloaded == 0 {
                    r == Some(ProgressLine::Size(total)) && final(self).next_report_at as nat
                        == progress_step(total as nat) && final(self).last_reported_bytes == 0
                } else if downloaded >= next || downloaded == total {
                    &&& r == if downloaded != last {
                        Some(ProgressLine::Fraction(downloaded, total))
                    } else {
                        None
                    }
                    &&& final(self).last_reported_bytes == downloaded
                    &&& final(self).next_report_at as nat == advance(
                        next as nat,
                        progress_step(total as nat),
                        downloaded as nat,
                    )
                } else {
                    r is None && final(self).next_report_at == next
                        && final(self).last_reported_bytes == last
                }
            }),
    {
        if total == 0 {
            if downloaded == 0 {
                self.next_report_at = CLI_DOWNLOAD_PROGRESS_STEP_BYTES;
                self.last_reported_bytes = 0;
                return None;
            }
            if downloaded >= self.next_report_at {
                self.last_reported_bytes = downloaded;
                self.next_report_at = downloaded.saturating_add(CLI_DOWNLOAD_PROGRESS_STEP_BYTES);
                return Some(ProgressLine::Received(downloaded));
            }
            return None;
        }
        if downloaded == 0 {
            let step = download_progress_step(total);
            self.next_report_at = step;
            self.last_reported_bytes = 0;
            return Some(ProgressLine::Size(total));
        }
        if downloaded >= self.next_report_at || downloaded == total {
            let line = if downloaded != self.last_reported_bytes {
                self.last_reported_bytes = downloaded;
                Some(ProgressLine::Fraction(downloaded, total))
            } else {
                None
            };
            let step = download_progress_step(total);
            let ghost start = self.next_report_at;
            let mut next = self.next_report_at;
            while next <= downloaded
                invariant
                    downloaded < u64::MAX,
                    step >= 1,
                    advance(start as nat, step as nat, downloaded as nat) == advance(
                        next as nat,
                        step as nat,
                        downloaded as nat,
                    ),
                decreases u64::MAX - next,
            {
                next = next.saturating_add(step);
            }
            self.next_report_at = next;
            return line;
        }
        None
    }
}

/// A byte count as the command-line progress shows it (`1.5 GiB`).
pub fn human_bytes(bytes: u64) -> (r: String)
    ensures
        r@ == bytes_text(bytes as nat),
{
    format_bytes(bytes)
}

/// The text of a progress line; `percent` is the share received, already
/// rounded and written out (it is only used for `Fraction`).
pub open spec fn progress_text(line: ProgressLine, percent: Seq<char>) -> Seq<char> {
    match line {
        ProgressLine::Size(t) => "Download size: "@ + bytes_text(t as nat),
        ProgressLine::Received(b) => "Download progress: "@ + bytes_text(b as nat)
            + " downloaded"@,
        ProgressLine::Fraction(d, t) => "Download progress: "@ + bytes_text(d as nat) + " / "@
            + bytes_text(t as nat) + " ("@ + percent + "%)"@,
    }
}

pub fn progress_line_text(line: ProgressLine, percent: &str) -> (r: String)
    ensures
        r@ == progress_text(line, percent@),
{
    let mut m: Vec<char>;
    match line {
        ProgressLine::Size(t) => {
            m = chars_of("Download size: ");
            push_all(&mut m, chars_of(human_bytes(t).as_str()).as_slice());
        },
        ProgressLine::Received(b) => {
            m = chars_of("Download progress: ");
            push_all(&mut m, chars_of(human_bytes(b).as_str()).as_slice());
            push_all(&mut m, chars_of(" downloaded").as_slice());
        },
        ProgressLine::Fraction(d, t) => {
            m = chars_of("Download progress: ");
            push_all(&mut m, chars_of(human_bytes(d).as_str()).as_slice());
            push_all(&mut m, chars_of(" / ").as_slice());
            push_all(&mut m, chars_of(human_bytes(t).as_str()).as_slice());
            push_all(&mut m, chars_of(" (").as_slice());
            push_all(&mut m, chars_of(percent).as_slice());
            push_all(&mut m, chars_of("%)").as_slice());
        },
    }
    string_of(m.as_slice())
}


/// Every byte is written as two hexadecimal digits, so a SHA-256 digest
/// reads as 64 characters.
pub proof fn lemma_hex_len(bytes: Seq<u8>)
    ensures
        hex(bytes).len() == 2 * bytes.len(),
    decreases bytes.len(),
{
    if bytes.len() > 0 {
        lemma_hex_len(bytes.drop_last());
    }
}

/// After a progress report the next threshold lies beyond what has been
/// received, so no byte count is reported twice.
pub proof fn lemma_threshold_moves_past(next: nat, step: nat, downloaded: nat)
    requires
        step > 0,
        downloaded < u64::MAX,
    ensures
        advance(next, step, downloaded) > downloaded,
    decreases downloaded - next,
{
    if next <= downloaded && next < u64::MAX {
        let n2 = sat_add(next, step);
        if n2 <= downloaded {
            lemma_threshold_moves_past(n2, step, downloaded);
        }
    }
}

} // verus!
