use azure_storage_blobs::blob::BlobBlockType;
use std::collections::HashMap;
use voice_memos::audio_storage::{
    blob_file_name, reassemble, AudioStorage, AzureAudioStorage, BlockUpload, LocalAudioStorage,
    MockAudioStorage, StorageRequest, AUDIO_FILE_EXTENSION, AUDIO_FILE_MIMETYPE,
    DOWNLOAD_CHUNK_SIZE, MAX_BLOCKS, STAGING_SUFFIX, UPLOADS_DIRECTORY,
};
use voice_memos::text::{decimal, digit_text, hex8};

#[test]
fn hex8_pads_to_eight_upper_case_digits() {
    assert_eq!(hex8(0), "00000000");
    assert_eq!(hex8(10), "0000000A");
    assert_eq!(hex8(255), "000000FF");
    assert_eq!(hex8(0xDEADBEEF), "DEADBEEF");
    assert_eq!(hex8(u32::MAX), "FFFFFFFF");
}

#[test]
fn hex8_matches_the_standard_format() {
    for n in [0u32, 1, 9, 15, 16, 4095, 65536, 0x7FFF_FFFF, 0x8000_0000] {
        assert_eq!(hex8(n), format!("{:08X}", n));
    }
}

#[test]
fn hex8_sorts_as_numbers_do() {
    let numbers = [0u32, 1, 9, 10, 15, 16, 255, 256, 4096, 0xFFFF, 0x10000, u32::MAX];
    for pair in numbers.windows(2) {
        assert!(hex8(pair[0]) < hex8(pair[1]));
        assert_eq!(hex8(pair[0]).len(), 8);
    }
}

#[test]
fn decimal_matches_display() {
    for n in [0, 7, 10, 42, -1, -10, 1234567, i32::MAX, i32::MIN] {
        assert_eq!(decimal(n), format!("{}", n));
    }
}

#[test]
fn digit_text_covers_both_ranges() {
    let digits: String = (0..16).map(digit_text).collect();
    assert_eq!(digits, "0123456789ABCDEF");
}

#[test]
fn constants_of_the_storage() {
    assert_eq!(AUDIO_FILE_EXTENSION, ".webm");
    assert_eq!(UPLOADS_DIRECTORY, "uploads");
    assert_eq!(AUDIO_FILE_MIMETYPE, "audio/webm");
    assert_eq!(DOWNLOAD_CHUNK_SIZE, 2_097_152);
    assert_eq!(MAX_BLOCKS, 4_294_967_296);
}

#[test]
fn local_path_is_id_and_extension_in_uploads() {
    assert_eq!(blob_file_name(7), "7.webm");
    assert_eq!(LocalAudioStorage.get_path(7), "uploads/7.webm");
    assert_eq!(LocalAudioStorage.get_path(-3), "uploads/-3.webm");
    assert_eq!(LocalAudioStorage.get_path(i32::MAX), "uploads/2147483647.webm");
}

#[test]
fn staging_file_is_the_place_of_no_blob() {
    assert_eq!(LocalAudioStorage.get_staging_path(7), "uploads/7.webm.part");
    assert_eq!(STAGING_SUFFIX, ".part");
    let ids = [0, 1, 7, -7, 70, i32::MAX, i32::MIN];
    for a in ids {
        for b in ids {
            assert_ne!(LocalAudioStorage.get_staging_path(a), LocalAudioStorage.get_path(b));
        }
    }
}

#[test]
fn different_blobs_get_different_paths() {
    let ids = [0, 1, 10, 100, -1, -10, 11, 101, i32::MAX, i32::MIN];
    for a in ids {
        for b in ids {
            if a != b {
                assert_ne!(LocalAudioStorage.get_path(a), LocalAudioStorage.get_path(b));
                assert_ne!(blob_file_name(a), blob_file_name(b));
            }
        }
    }
}

#[test]
fn local_backend_creates_its_directory_only_when_missing() {
    let (_, create) = LocalAudioStorage::new(true);
    assert_eq!(create, None);
    let (_, create) = LocalAudioStorage::new(false);
    assert_eq!(create, Some("uploads".to_string()));
}

#[test]
fn block_upload_names_blocks_in_order() {
    let mut upload = BlockUpload::new();
    assert_eq!(upload.next_block().unwrap(), "00000000");
    assert_eq!(upload.next_block().unwrap(), "00000001");
    let list = upload.finish();
    assert_eq!(
        list.blocks,
        vec![
            BlobBlockType::new_uncommitted("00000000"),
            BlobBlockType::new_uncommitted("00000001"),
        ]
    );
}

#[test]
fn block_upload_without_chunks_commits_an_empty_list() {
    let list = BlockUpload::new().finish();
    assert!(list.blocks.is_empty());
}

#[test]
fn block_upload_counts_past_fifteen_in_hexadecimal() {
    let mut upload = BlockUpload::new();
    let mut last = String::new();
    for _ in 0..17 {
        last = upload.next_block().unwrap();
    }
    assert_eq!(last, "00000010");
    assert_eq!(upload.finish().blocks.len(), 17);
}

fn storage_request_text(request: &StorageRequest) -> String {
    format!("{:?}", request)
}

#[test]
fn local_backend_requests_name_the_same_file() {
    let storage = AudioStorage::Local(LocalAudioStorage);
    assert!(matches!(storage.get(7), StorageRequest::ReadFile { path } if path == "uploads/7.webm"));
    assert!(matches!(
        storage.store(7),
        StorageRequest::WriteFile { staging, path }
            if staging == "uploads/7.webm.part" && path == "uploads/7.webm"
    ));
    assert!(
        matches!(storage.delete(7), StorageRequest::RemoveFile { path } if path == "uploads/7.webm")
    );
}

#[test]
fn remote_backend_requests_name_the_same_blob() {
    let azure = AzureAudioStorage::new("account", "key", "container");
    assert_eq!(azure.account(), "account");
    assert_eq!(azure.access_key(), "key");
    assert_eq!(azure.container(), "container");
    let storage = AudioStorage::Azure(azure);
    assert!(matches!(
        storage.get(12),
        StorageRequest::ReadBlob { blob, chunk_size } if blob == "12.webm" && chunk_size == 2 * 1024 * 1024
    ));
    assert!(matches!(
        storage.store(12),
        StorageRequest::UploadBlocks { blob, content_type }
            if blob == "12.webm" && content_type == "audio/webm"
    ));
    assert!(matches!(storage.delete(12), StorageRequest::DeleteBlob { blob } if blob == "12.webm"));
}

#[test]
fn mock_backend_touches_nothing() {
    let storage = AudioStorage::Mock(MockAudioStorage);
    assert_eq!(storage_request_text(&storage.get(1)), "EmptyObject");
    assert_eq!(storage_request_text(&storage.store(1)), "Nothing");
    assert_eq!(storage_request_text(&storage.delete(1)), "Nothing");
}

#[test]
fn reassemble_joins_pages_in_order() {
    assert_eq!(reassemble(&vec![]), Vec::<u8>::new());
    assert_eq!(reassemble(&vec![vec![], vec![]]), Vec::<u8>::new());
    assert_eq!(reassemble(&vec![vec![1, 2], vec![], vec![3], vec![4, 5, 6]]), vec![1, 2, 3, 4, 5, 6]);
}

/// Stores `bytes` cut into chunks of `chunk` bytes as blocks, commits the list, reads
/// the blob back in pages of `page` bytes and puts the pages together.
fn round_trip_through_blocks(bytes: &[u8], chunk: usize, page: usize) -> Vec<u8> {
    let mut staged: HashMap<Vec<u8>, Vec<u8>> = HashMap::new();
    let mut upload = BlockUpload::new();
    for part in bytes.chunks(chunk) {
        let id = upload.next_block().unwrap();
        staged.insert(id.into_bytes(), part.to_vec());
    }
    let mut blob = Vec::new();
    for block in upload.finish().blocks {
        match block {
            BlobBlockType::Uncommitted(id) => blob.extend_from_slice(&staged[id.as_ref()]),
            other => panic!("unexpected block {:?}", other),
        }
    }
    let pages: Vec<Vec<u8>> = blob.chunks(page).map(|p| p.to_vec()).collect();
    reassemble(&pages)
}

#[test]
fn round_trip_is_exact_whatever_the_chunk_boundaries() {
    let bytes: Vec<u8> = (0..1000u32).map(|n| (n * 7 % 251) as u8).collect();
    for chunk in [1, 2, 3, 7, 64, 999, 1000, 5000] {
        for page in [1, 5, 256, 1000, 4096] {
            assert_eq!(round_trip_through_blocks(&bytes, chunk, page), bytes);
        }
    }
    assert_eq!(round_trip_through_blocks(&[], 4, 4), Vec::<u8>::new());
}
