use jabberwok::models::{
    check_checksum, download_destination, download_progress_step, hex_string, progress_line_text,
    CliDownloadProgress, Destination, DownloadTally, ProgressLine,
    CLI_DOWNLOAD_PROGRESS_STEP_BYTES,
};

#[test]
fn download_progress_step_targets_about_five_updates_for_large_downloads() {
    assert_eq!(download_progress_step(5 * 1024 * 1024 * 1024), 1024 * 1024 * 1024);
}

#[test]
fn download_progress_step_uses_hundreds_of_megabytes_for_smaller_downloads() {
    assert_eq!(download_progress_step(600 * 1024 * 1024), CLI_DOWNLOAD_PROGRESS_STEP_BYTES);
}

#[test]
fn download_progress_step_rounds_up_and_handles_unknown_size() {
    assert_eq!(download_progress_step(0), CLI_DOWNLOAD_PROGRESS_STEP_BYTES);
    assert_eq!(download_progress_step(5 * 300_000_000 + 1), 300_000_001);
}

#[test]
fn checksum_of_received_bytes() {
    let mut tally = DownloadTally::new(3);
    tally.on_chunk(b"a");
    tally.on_chunk(b"bc");
    assert_eq!(tally.downloaded(), 3);
    assert_eq!(tally.total(), 3);
    let digest = tally.finish();
    let hex = hex_string(&digest);
    assert_eq!(hex, "ba7816bf8f01cfea414140de5dae2223b00361a396177a9cb410ff61f20015ad");
    assert!(check_checksum("m", &None, &digest).is_ok());
    assert!(check_checksum("m", &Some(format!("  {hex}\n")), &digest).is_ok());
    let err = check_checksum("m", &Some("00".to_string()), &digest).unwrap_err();
    assert_eq!(
        err.message(),
        format!("sha256 mismatch for m; expected 00, got {hex}")
    );
}

#[test]
fn hex_of_bytes() {
    assert_eq!(hex_string(&[0x00, 0x0f, 0xa0, 0xff]), "000fa0ff");
}

#[test]
fn destination_depends_on_archive_url() {
    assert_eq!(
        download_destination("https://x/p.tar.gz?x=1", "/m", "p"),
        Destination::Extract { dir: "/m/p".to_string() }
    );
    assert_eq!(
        download_destination("https://x/p.bin", "/m", "p"),
        Destination::Move { file: "/m/p".to_string() }
    );
}

#[test]
fn cli_progress_reports_size_then_thresholds() {
    let mut p = CliDownloadProgress::new("tiny", "/m");
    assert_eq!(p.on_phase("Downloading model...").as_deref(), Some("Downloading model `tiny` into /m"));
    assert_eq!(p.on_phase("Downloading model..."), None);
    assert_eq!(p.on_phase("Extracting model...").as_deref(), Some("Extracting model archive..."));
    assert_eq!(p.on_phase("Finishing setup...").as_deref(), Some("Saving model configuration..."));
    assert_eq!(p.on_phase("Other").as_deref(), Some("Other"));
    let total = 1000 * 1024 * 1024;
    assert_eq!(p.on_progress(0, total), Some(ProgressLine::Size(total)));
    assert_eq!(p.next_report_at, CLI_DOWNLOAD_PROGRESS_STEP_BYTES);
    assert_eq!(p.on_progress(100, total), None);
    let big = CLI_DOWNLOAD_PROGRESS_STEP_BYTES * 2 + 5;
    assert_eq!(p.on_progress(big, total), Some(ProgressLine::Fraction(big, total)));
    assert_eq!(p.next_report_at, CLI_DOWNLOAD_PROGRESS_STEP_BYTES * 3);
    assert_eq!(p.on_progress(total, total), Some(ProgressLine::Fraction(total, total)));
    assert_eq!(p.on_progress(total, total), None);
}

#[test]
fn cli_progress_with_unknown_size() {
    let mut p = CliDownloadProgress::new("tiny", "/m");
    assert_eq!(p.on_progress(0, 0), None);
    assert_eq!(p.on_progress(10, 0), None);
    let b = CLI_DOWNLOAD_PROGRESS_STEP_BYTES + 1;
    assert_eq!(p.on_progress(b, 0), Some(ProgressLine::Received(b)));
    assert_eq!(p.next_report_at, b + CLI_DOWNLOAD_PROGRESS_STEP_BYTES);
}

#[test]
fn progress_line_texts() {
    assert_eq!(progress_line_text(ProgressLine::Size(2 * 1024 * 1024 * 1024), ""), "Download size: 2.0 GiB");
    assert_eq!(
        progress_line_text(ProgressLine::Received(3 * 1024 * 1024), ""),
        "Download progress: 3.0 MiB downloaded"
    );
    assert_eq!(
        progress_line_text(ProgressLine::Fraction(512 * 1024 * 1024, 1024 * 1024 * 1024), "50"),
        "Download progress: 512.0 MiB / 1.0 GiB (50%)"
    );
}
