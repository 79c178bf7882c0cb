use banshee::input::paste::PastePlan;

fn reassemble(plan: PastePlan) -> Vec<u8> {
    plan.chunks().concat()
}

#[test]
fn bracketed_wraps_with_start_and_end_markers() {
    let plan = PastePlan::new("hello", true, 1024);
    let bytes = reassemble(plan);
    assert_eq!(bytes, b"\x1b[200~hello\x1b[201~".to_vec());
}

#[test]
fn non_bracketed_has_no_markers() {
    let plan = PastePlan::new("hello", false, 1024);
    let bytes = reassemble(plan);
    assert_eq!(bytes, b"hello".to_vec());
}

#[test]
fn bracketed_delimiters_never_split_across_chunks() {
    let plan = PastePlan::new("abcdefgh", true, 3);
    let chunks: Vec<Vec<u8>> = plan.chunks();
    let reassembled: Vec<u8> = chunks.iter().flatten().copied().collect();
    assert_eq!(reassembled, b"\x1b[200~abcdefgh\x1b[201~".to_vec());
    for c in &chunks {
        assert!(c.len() <= 3, "chunk exceeded chunk_size: {c:?}");
    }
}

#[test]
fn embedded_terminator_is_sanitized() {
    let hostile = "before\x1b[201~after";
    let plan = PastePlan::new(hostile, true, 1024);
    let bytes = reassemble(plan);
    assert_eq!(bytes, b"\x1b[200~beforeafter\x1b[201~".to_vec());
    let marker = b"\x1b[201~";
    let count = bytes.windows(marker.len()).filter(|w| *w == marker).count();
    assert_eq!(count, 1, "expected exactly one surviving end marker");
    assert!(bytes.ends_with(marker));
}

#[test]
fn embedded_terminator_sanitization_handles_multiple_occurrences() {
    let hostile = "a\x1b[201~b\x1b[201~c";
    let plan = PastePlan::new(hostile, true, 1024);
    let bytes = reassemble(plan);
    assert_eq!(bytes, b"\x1b[200~abc\x1b[201~".to_vec());
}

#[test]
fn non_bracketed_paste_is_not_sanitized_for_terminator() {
    let text = "before\x1b[201~after";
    let plan = PastePlan::new(text, false, 1024);
    let bytes = reassemble(plan);
    assert_eq!(bytes, text.as_bytes().to_vec());
}

#[test]
fn crlf_normalizes_to_cr() {
    let plan = PastePlan::new("line1\r\nline2", false, 1024);
    let bytes = reassemble(plan);
    assert_eq!(bytes, b"line1\rline2".to_vec());
}

#[test]
fn bare_lf_normalizes_to_cr() {
    let plan = PastePlan::new("line1\nline2", false, 1024);
    let bytes = reassemble(plan);
    assert_eq!(bytes, b"line1\rline2".to_vec());
}

#[test]
fn bare_cr_stays_cr() {
    let plan = PastePlan::new("line1\rline2", false, 1024);
    let bytes = reassemble(plan);
    assert_eq!(bytes, b"line1\rline2".to_vec());
}

#[test]
fn mixed_line_endings_all_normalize() {
    let plan = PastePlan::new("a\r\nb\nc\rd", false, 1024);
    let bytes = reassemble(plan);
    assert_eq!(bytes, b"a\rb\rc\rd".to_vec());
}

#[test]
fn utf8_multibyte_never_split_at_chunk_boundary() {
    let text = "a中文b";
    for chunk_size in 1..=9 {
        let plan = PastePlan::new(text, false, chunk_size);
        let chunks: Vec<Vec<u8>> = plan.chunks();
        for c in &chunks {
            assert!(
                std::str::from_utf8(c).is_ok(),
                "chunk_size={chunk_size}: chunk {c:?} split a UTF-8 sequence"
            );
        }
        let reassembled: Vec<u8> = chunks.iter().flatten().copied().collect();
        assert_eq!(
            reassembled,
            text.as_bytes().to_vec(),
            "chunk_size={chunk_size}: reassembly mismatch"
        );
    }
}

#[test]
fn utf8_multibyte_at_exact_boundary_bracketed() {
    let text = "emoji: 🎉🎊 done";
    for chunk_size in [1usize, 2, 3, 4, 5, 7, 11, 100] {
        let plan = PastePlan::new(text, true, chunk_size);
        let chunks: Vec<Vec<u8>> = plan.chunks();
        let reassembled: Vec<u8> = chunks.iter().flatten().copied().collect();
        let mut expected = Vec::new();
        expected.extend_from_slice(b"\x1b[200~");
        expected.extend_from_slice(text.as_bytes());
        expected.extend_from_slice(b"\x1b[201~");
        assert_eq!(reassembled, expected, "chunk_size={chunk_size}");
    }
}

#[test]
fn chunk_size_zero_treated_as_one_no_infinite_loop() {
    let plan = PastePlan::new("abc", false, 0);
    let chunks: Vec<Vec<u8>> = plan.chunks();
    let reassembled: Vec<u8> = chunks.iter().flatten().copied().collect();
    assert_eq!(reassembled, b"abc".to_vec());
    assert!(chunks.len() >= 3);
}

#[test]
fn empty_text_produces_no_chunks_for_non_bracketed() {
    let plan = PastePlan::new("", false, 1024);
    let chunks: Vec<Vec<u8>> = plan.chunks();
    assert!(chunks.is_empty());
}

#[test]
fn empty_text_bracketed_still_emits_markers() {
    let plan = PastePlan::new("", true, 1024);
    let bytes = reassemble(plan);
    assert_eq!(bytes, b"\x1b[200~\x1b[201~".to_vec());
}

#[test]
fn total_len_matches_reassembled_length() {
    let plan = PastePlan::new("hello world", true, 4);
    let total = plan.total_len();
    let bytes = reassemble(plan);
    assert_eq!(total, bytes.len());
}

#[test]
fn large_text_exact_reassembly() {
    let text: String = "The quick brown fox jumps over the lazy dog. 中文测试 🎉\r\n".repeat(200);
    let plan = PastePlan::new(&text, true, 97);
    let chunks: Vec<Vec<u8>> = plan.chunks();
    for c in &chunks {
        assert!(c.len() <= 97);
    }
    let reassembled: Vec<u8> = chunks.iter().flatten().copied().collect();
    let mut expected = Vec::new();
    expected.extend_from_slice(b"\x1b[200~");
    expected.extend_from_slice(text.as_bytes());
    expected.extend_from_slice(b"\x1b[201~");
    assert_eq!(reassembled, expected);
}

#[test]
fn spliced_terminators_leave_none_behind() {
    let hostile = "\x1b[20\x1b[201~1~x";
    let bytes = reassemble(PastePlan::new(hostile, true, 1024));
    assert_eq!(bytes, b"\x1b[200~x\x1b[201~".to_vec());
}

#[test]
fn bracketed_text_keeps_its_line_ends() {
    let bytes = reassemble(PastePlan::new("a\r\nb\nc", true, 1024));
    assert_eq!(bytes, b"\x1b[200~a\r\nb\nc\x1b[201~".to_vec());
}

#[test]
fn markers_stay_whole_where_they_fit() {
    for chunk_size in 6..40 {
        let chunks = PastePlan::new("hello, paste", true, chunk_size).chunks();
        assert!(chunks.first().unwrap().starts_with(b"\x1b[200~"));
        assert!(chunks.last().unwrap().ends_with(b"\x1b[201~"));
        for c in &chunks {
            assert!(c.len() <= chunk_size);
        }
    }
}

#[test]
fn chunks_are_as_long_as_the_size_lets_them() {
    let chunks = PastePlan::new("aé€🎉bc", false, 3).chunks();
    let expected: Vec<Vec<u8>> = vec![
        "aé".as_bytes().to_vec(),
        "€".as_bytes().to_vec(),
        "🎉".as_bytes().to_vec(),
        b"bc".to_vec(),
    ];
    assert_eq!(chunks, expected);
    let chunks = PastePlan::new("abcdef", true, 8).chunks();
    let expected: Vec<Vec<u8>> = vec![
        b"\x1b[200~ab".to_vec(),
        b"cdef".to_vec(),
        b"\x1b[201~".to_vec(),
    ];
    assert_eq!(chunks, expected);
    let chunks = PastePlan::new("x", true, 1).chunks();
    assert_eq!(chunks.len(), 13);
}

#[test]
fn chunks_come_one_by_one() {
    let mut plan = PastePlan::new("abcde", false, 2);
    assert_eq!(plan.total_len(), 5);
    assert_eq!(plan.next(), Some(b"ab".to_vec()));
    assert_eq!(plan.next(), Some(b"cd".to_vec()));
    assert_eq!(plan.next(), Some(b"e".to_vec()));
    assert_eq!(plan.next(), None);
    assert_eq!(plan.next(), None);
    assert_eq!(plan.total_len(), 5);
}
