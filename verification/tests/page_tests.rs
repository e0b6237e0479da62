use mosquito_core::{
    content_disposition, escape_html, format_size, percent_encode, render_listing, FileId,
    SharedFile,
};

// --- percent_encode ---

#[test]
fn percent_encode_keeps_unreserved_ascii() {
    assert_eq!(percent_encode("report-2_final.txt"), "report-2_final.txt");
}

#[test]
fn percent_encode_encodes_spaces_and_symbols() {
    assert_eq!(
        percent_encode("my file (v2).txt"),
        "my%20file%20%28v2%29.txt"
    );
}

#[test]
fn percent_encode_encodes_utf8_as_bytes() {
    // 'é' is two bytes (C3 A9) in UTF-8
    assert_eq!(percent_encode("café.txt"), "caf%C3%A9.txt");
}

// --- escape_html ---

#[test]
fn escape_html_escapes_all_specials() {
    assert_eq!(escape_html(r#"&<>"'"#), "&amp;&lt;&gt;&quot;&#39;");
}

#[test]
fn escape_html_ampersand_first_never_double_escapes() {
    assert_eq!(escape_html("&lt;"), "&amp;lt;");
}

// --- format_size ---

#[test]
fn format_size_bytes() {
    assert_eq!(format_size(0), "0 B");
    assert_eq!(format_size(999), "999 B");
}

#[test]
fn format_size_kilobytes() {
    assert_eq!(format_size(1024), "1.0 KB");
    assert_eq!(format_size(1536), "1.5 KB");
}

#[test]
fn format_size_megabytes_and_gigabytes() {
    assert_eq!(format_size(5 * 1024 * 1024), "5.0 MB");
    assert_eq!(format_size(3 * 1024 * 1024 * 1024), "3.0 GB");
}

// --- render_listing ---

#[test]
fn listing_shows_empty_message_without_links() {
    let html = render_listing(&[]);

    assert!(html.contains("Nothing is being shared"));
    assert!(!html.contains("<li>"));
}

#[test]
fn listing_escapes_names_and_links_ids() {
    let files = vec![SharedFile {
        id: FileId(0),
        name: "<script>.txt".into(),
        path: "unused".into(),
        size: 42,
    }];

    let html = render_listing(&files);

    assert!(html.contains("&lt;script&gt;.txt"));
    assert!(html.contains("href=\"/download/0\""));
    assert!(html.contains("42 B"));
    assert!(!html.contains("<script>"));
}

// --- further cases ---

/// What `format!("{value:.1} {unit}")` prints for `bytes as f64 / unit as f64`.
fn float_formatted(bytes: u64, unit: u64, suffix: &str) -> String {
    format!("{:.1} {}", bytes as f64 / unit as f64, suffix)
}

#[test]
fn format_size_matches_float_formatting() {
    const KB: u64 = 1024;
    const MB: u64 = KB * 1024;
    const GB: u64 = MB * 1024;
    const TB: u64 = GB * 1024;
    let samples: [u64; 16] = [
        1024,
        1075,
        1280,        // 1.25 KB: a tie between 1.2 and 1.3
        1792,        // 1.75 KB: a tie between 1.7 and 1.8
        2304,        // 2.25 KB
        1048575,     // just under 1 MB: 1024.0 KB
        1048576,
        5 * MB + 1,
        GB - 1,
        3 * GB + 512 * MB,
        TB,
        TB + TB / 4, // 1.25 TB
        (1u64 << 53) + 1,
        (1u64 << 60) + 12345,
        u64::MAX - 1024,
        u64::MAX,
    ];
    for bytes in samples {
        let expected = if bytes >= TB {
            float_formatted(bytes, TB, "TB")
        } else if bytes >= GB {
            float_formatted(bytes, GB, "GB")
        } else if bytes >= MB {
            float_formatted(bytes, MB, "MB")
        } else {
            float_formatted(bytes, KB, "KB")
        };
        assert_eq!(format_size(bytes), expected, "bytes = {bytes}");
    }
}

#[test]
fn format_size_rounds_ties_to_even() {
    assert_eq!(format_size(1280), "1.2 KB");
    assert_eq!(format_size(1792), "1.8 KB");
    assert_eq!(format_size(1023), "1023 B");
    assert_eq!(format_size(1048575), "1024.0 KB");
}

#[test]
fn listing_counts_files_and_keeps_their_order() {
    let files = vec![
        SharedFile { id: FileId(3), name: "b.txt".into(), path: "/b".into(), size: 2048 },
        SharedFile { id: FileId(7), name: "a.txt".into(), path: "/a".into(), size: 1 },
    ];
    let html = render_listing(&files);
    assert!(html.contains("<p>2 files available:</p>"));
    let b = html.find("b.txt").unwrap();
    let a = html.find("a.txt").unwrap();
    assert!(b < a);
    assert!(html.contains("href=\"/download/7\""));
    assert!(html.contains("(2.0 KB)"));
    assert!(html.starts_with("<!DOCTYPE html>"));
    assert!(html.ends_with("</body></html>"));
}

#[test]
fn listing_of_one_file_uses_singular() {
    let files = vec![SharedFile { id: FileId(0), name: "x".into(), path: "/x".into(), size: 0 }];
    let html = render_listing(&files);
    assert!(html.contains("<p>1 file available:</p><ul><li>"));
}

#[test]
fn content_disposition_has_plain_and_extended_names() {
    assert_eq!(
        content_disposition("blob.bin"),
        "attachment; filename=\"blob.bin\"; filename*=UTF-8''blob.bin"
    );
    let value = content_disposition("café.txt");
    assert!(value.contains("filename*=UTF-8''caf%C3%A9.txt"));
    assert!(value.is_ascii());
    assert!(!value.contains('\u{e9}'));
}

#[test]
fn escape_html_keeps_other_text() {
    assert_eq!(escape_html("résumé 100%"), "résumé 100%");
    assert_eq!(escape_html(""), "");
}

// --- download replies ---

fn shared(name: &str) -> SharedFile {
    SharedFile { id: FileId(0), name: name.into(), path: "/tmp/share/x".into(), size: 3 }
}

#[test]
fn download_of_unknown_id_is_not_found() {
    let reply = mosquito_core::download_reply(None, false, None);
    assert!(matches!(reply, mosquito_core::DownloadReply::NotFound));
    assert_eq!(reply.status_code(), 404);
    assert_eq!(reply.error_body().as_deref(), Some("not found\n"));
}

#[test]
fn download_of_unopenable_file_is_not_found() {
    let reply = mosquito_core::download_reply(Some(shared("gone.txt")), false, None);
    assert_eq!(reply.status_code(), 404);
}

#[test]
fn download_with_unreadable_length_is_an_internal_error() {
    let reply = mosquito_core::download_reply(Some(shared("a.txt")), true, None);
    assert!(matches!(reply, mosquito_core::DownloadReply::Unreadable));
    assert_eq!(reply.status_code(), 500);
    assert_eq!(reply.error_body().as_deref(), Some("could not read file\n"));
}

#[test]
fn download_uses_the_current_length_and_an_attachment_header() {
    // Recorded size is 3; the file now holds 4096 bytes.
    let reply = mosquito_core::download_reply(Some(shared("café.txt")), true, Some(4096));
    assert_eq!(reply.status_code(), 200);
    assert!(reply.error_body().is_none());
    match reply {
        mosquito_core::DownloadReply::Attachment {
            content_type,
            content_length,
            content_disposition,
        } => {
            assert_eq!(content_type, "application/octet-stream");
            assert_eq!(content_length, 4096);
            assert!(content_disposition.contains("filename*=UTF-8''caf%C3%A9.txt"));
        }
        other => panic!("unexpected: {other:?}"),
    }
}

/// Percent-decoding: `%XY` becomes the byte 0xXY, anything else is copied.
fn percent_decode(s: &str) -> Vec<u8> {
    let b = s.as_bytes();
    let mut out = Vec::new();
    let mut i = 0;
    while i < b.len() {
        if b[i] == b'%' && i + 2 < b.len() {
            let hex = std::str::from_utf8(&b[i + 1..i + 3]).unwrap();
            out.push(u8::from_str_radix(hex, 16).unwrap());
            i += 3;
        } else {
            out.push(b[i]);
            i += 1;
        }
    }
    out
}

#[test]
fn percent_encoding_decodes_back() {
    for s in ["report-2_final.txt", "my file (v2).txt", "café.txt", "%41", "日本語 ~.zip", ""] {
        assert_eq!(percent_decode(&percent_encode(s)), s.as_bytes(), "{s}");
    }
    assert_ne!(percent_encode("a b"), percent_encode("a+b"));
}
