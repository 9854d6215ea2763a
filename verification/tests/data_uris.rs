use gltf_loader::buffer::{
    load_buffer, load_buffer_uri, load_buffers, BufferProgress, BufferSource, BufferStep,
};
use gltf_loader::data_uri::{split_once, strip_prefix, strip_suffix, DataUri};
use gltf_loader::loader::{ErrorKind, GltfError, Mode};

#[test]
fn split_once_splits_at_the_first_delimiter() {
    assert_eq!(split_once("a,b,c", ','), Some(("a", "b,c")));
    assert_eq!(split_once(",", ','), Some(("", "")));
    assert_eq!(split_once("abc,", ','), Some(("abc", "")));
    assert_eq!(split_once(",abc", ','), Some(("", "abc")));
    assert_eq!(split_once("abc", ','), None);
    assert_eq!(split_once("", ','), None);
    assert_eq!(split_once("käse;brot;", ';'), Some(("käse", "brot;")));
    assert_eq!(split_once("a→b→c", '→'), Some(("a", "b→c")));
}

#[test]
fn prefixes_and_suffixes_are_stripped() {
    assert_eq!(strip_prefix("data:x", "data:"), Some("x"));
    assert_eq!(strip_prefix("data:", "data:"), Some(""));
    assert_eq!(strip_prefix("data", "data:"), None);
    assert_eq!(strip_prefix("Data:x", "data:"), None);
    assert_eq!(strip_prefix("x", ""), Some("x"));
    assert_eq!(strip_suffix("image/png;base64", ";base64"), Some("image/png"));
    assert_eq!(strip_suffix(";base64", ";base64"), Some(""));
    assert_eq!(strip_suffix("base64", ";base64"), None);
    assert_eq!(strip_suffix("image/png;base64 ", ";base64"), None);
    assert_eq!(strip_suffix("größe;base64", ";base64"), Some("größe"));
}

#[test]
fn data_uri_is_taken_apart() {
    assert_eq!(
        DataUri::parse("data:application/octet-stream;base64,AAEC"),
        Ok(DataUri { mime_type: "application/octet-stream", base64: true, data: "AAEC" })
    );
    assert_eq!(
        DataUri::parse("data:text/plain,hello, world"),
        Ok(DataUri { mime_type: "text/plain", base64: false, data: "hello, world" })
    );
    assert_eq!(
        DataUri::parse("data:,"),
        Ok(DataUri { mime_type: "", base64: false, data: "" })
    );
    assert_eq!(
        DataUri::parse("data:;base64,"),
        Ok(DataUri { mime_type: "", base64: true, data: "" })
    );
    assert_eq!(
        DataUri::parse("data:a;base64;base64,x"),
        Ok(DataUri { mime_type: "a;base64", base64: true, data: "x" })
    );
}

#[test]
fn what_is_no_data_uri_is_refused() {
    assert_eq!(DataUri::parse("buffer.bin"), Err(()));
    assert_eq!(DataUri::parse("data:application/octet-stream;base64"), Err(()));
    assert_eq!(DataUri::parse("data"), Err(()));
    assert_eq!(DataUri::parse(""), Err(()));
    assert_eq!(DataUri::parse("DATA:a,b"), Err(()));
    assert_eq!(DataUri::parse(" data:a,b"), Err(()));
}

#[test]
fn data_uri_decodes_base64_and_plain_text() {
    let uri = DataUri::parse("data:application/octet-stream;base64,aGVsbG8gd29ybGQ=").unwrap();
    assert_eq!(uri.decode(), Ok(b"hello world".to_vec()));
    let uri = DataUri::parse("data:application/octet-stream;base64,AAEC/w==").unwrap();
    assert_eq!(uri.decode(), Ok(vec![0, 1, 2, 255]));
    let uri = DataUri::parse("data:text/plain,aGk=").unwrap();
    assert_eq!(uri.decode(), Ok(b"aGk=".to_vec()));
    let uri = DataUri::parse("data:text/plain,grüße").unwrap();
    assert_eq!(uri.decode(), Ok("grüße".as_bytes().to_vec()));
    let uri = DataUri::parse("data:application/octet-stream;base64,").unwrap();
    assert_eq!(uri.decode(), Ok(vec![]));
}

#[test]
fn data_uri_with_bad_base64_fails() {
    let uri = DataUri::parse("data:application/octet-stream;base64,a GVs").unwrap();
    assert!(uri.decode().is_err());
    let uri = DataUri::parse("data:application/octet-stream;base64,A").unwrap();
    assert!(uri.decode().is_err());
    let uri = DataUri::parse("data:application/octet-stream;base64,*").unwrap();
    assert!(uri.decode().is_err());
}

#[test]
fn buffer_in_a_data_uri_is_loaded() {
    assert_eq!(
        load_buffer_uri("data:application/octet-stream;base64,AAEC"),
        Ok(BufferStep::Loaded(vec![0, 1, 2]))
    );
    assert_eq!(
        load_buffer_uri("data:application/gltf-buffer;base64,/w=="),
        Ok(BufferStep::Loaded(vec![255]))
    );
    assert_eq!(
        load_buffer_uri("data:application/gltf-buffer,AAEC"),
        Ok(BufferStep::Loaded(b"AAEC".to_vec()))
    );
}

#[test]
fn buffer_of_another_mime_type_is_not_supported() {
    assert_eq!(load_buffer_uri("data:image/png;base64,AAEC"), Err(GltfError::BufferFormatUnsupported));
    assert_eq!(load_buffer_uri("data:;base64,AAEC"), Err(GltfError::BufferFormatUnsupported));
    assert_eq!(
        load_buffer_uri("data:application/octet-stream ;base64,AAEC"),
        Err(GltfError::BufferFormatUnsupported)
    );
    assert_eq!(
        load_buffer_uri("data:Application/Octet-Stream;base64,AAEC"),
        Err(GltfError::BufferFormatUnsupported)
    );
}

#[test]
fn buffer_with_bad_base64_fails_to_decode() {
    let failed = load_buffer_uri("data:application/octet-stream;base64,A").unwrap_err();
    assert_eq!(failed.error_kind(), ErrorKind::Base64Decode);
    assert!(matches!(failed, GltfError::Base64Decode(_)));
}

#[test]
fn buffer_beside_the_document_is_to_be_read() {
    assert_eq!(load_buffer_uri("model.bin"), Ok(BufferStep::Read("model.bin".to_string())));
    assert_eq!(
        load_buffer_uri("sub dir/model.bin"),
        Ok(BufferStep::Read("sub dir/model.bin".to_string()))
    );
    assert_eq!(load_buffer_uri(""), Ok(BufferStep::Read(String::new())));
}

#[test]
fn buffer_uri_is_percent_decoded_first() {
    let source = BufferSource::Uri("sub%20dir/model%2Ebin".to_string());
    assert_eq!(load_buffer(&source, &None), Some(Ok(BufferStep::Read("sub dir/model.bin".to_string()))));
    let source = BufferSource::Uri("data%3Aapplication/octet-stream;base64%2CAAEC".to_string());
    assert_eq!(load_buffer(&source, &None), Some(Ok(BufferStep::Loaded(vec![0, 1, 2]))));
    let source = BufferSource::Uri("gr%C3%BC%C3%9Fe.bin".to_string());
    assert_eq!(load_buffer(&source, &None), Some(Ok(BufferStep::Read("grüße.bin".to_string()))));
    let source = BufferSource::Uri("100%.bin".to_string());
    assert_eq!(load_buffer(&source, &None), Some(Ok(BufferStep::Read("100%.bin".to_string()))));
}

#[test]
fn buffer_uri_that_is_no_text_is_not_resolved() {
    let source = BufferSource::Uri("broken%FF.bin".to_string());
    assert_eq!(load_buffer(&source, &Some(vec![1])), None);
}

#[test]
fn binary_buffer_is_the_blob() {
    assert_eq!(
        load_buffer(&BufferSource::Bin, &Some(vec![9, 8, 7])),
        Some(Ok(BufferStep::Loaded(vec![9, 8, 7])))
    );
    assert_eq!(load_buffer(&BufferSource::Bin, &None), Some(Err(GltfError::MissingBlob)));
}

#[test]
fn buffers_are_loaded_in_order_until_one_needs_the_caller() {
    let sources = vec![
        BufferSource::Bin,
        BufferSource::Uri("data:application/octet-stream;base64,AAEC".to_string()),
        BufferSource::Uri("first.bin".to_string()),
        BufferSource::Uri("data:application/gltf-buffer;base64,/w==".to_string()),
        BufferSource::Uri("second%20one.bin".to_string()),
    ];
    let blob = Some(vec![42]);
    let mut data = Vec::new();
    assert_eq!(load_buffers(&sources, &blob, &mut data), BufferProgress::Read("first.bin".to_string()));
    assert_eq!(data, vec![vec![42], vec![0, 1, 2]]);
    assert_eq!(load_buffers(&sources, &blob, &mut data), BufferProgress::Read("first.bin".to_string()));
    data.push(vec![1, 1]);
    assert_eq!(
        load_buffers(&sources, &blob, &mut data),
        BufferProgress::Read("second one.bin".to_string())
    );
    assert_eq!(data, vec![vec![42], vec![0, 1, 2], vec![1, 1], vec![255]]);
    data.push(vec![]);
    assert_eq!(load_buffers(&sources, &blob, &mut data), BufferProgress::Done);
    assert_eq!(data.len(), 5);
    assert_eq!(load_buffers(&sources, &blob, &mut data), BufferProgress::Done);
}

#[test]
fn buffers_stop_at_the_first_failure() {
    let sources = vec![
        BufferSource::Uri("data:application/octet-stream;base64,AAEC".to_string()),
        BufferSource::Bin,
        BufferSource::Uri("never.bin".to_string()),
    ];
    let mut data = Vec::new();
    assert_eq!(
        load_buffers(&sources, &None, &mut data),
        BufferProgress::Failed(GltfError::MissingBlob)
    );
    assert_eq!(data, vec![vec![0, 1, 2]]);

    let sources = vec![BufferSource::Uri("data:image/png;base64,AAEC".to_string())];
    let mut data = Vec::new();
    assert_eq!(
        load_buffers(&sources, &None, &mut data),
        BufferProgress::Failed(GltfError::BufferFormatUnsupported)
    );
    assert!(data.is_empty());

    let sources = vec![BufferSource::Uri("%ff".to_string())];
    assert_eq!(load_buffers(&sources, &None, &mut data), BufferProgress::UndecodableUri);

    let sources = vec![];
    assert_eq!(load_buffers(&sources, &None, &mut data), BufferProgress::Done);
}

#[test]
fn every_error_has_its_kind() {
    let errors = vec![
        (GltfError::UnsupportedPrimitive { mode: Mode::LineLoop }, ErrorKind::UnsupportedPrimitive),
        (GltfError::Gltf("x".to_string()), ErrorKind::Gltf),
        (GltfError::MissingBlob, ErrorKind::MissingBlob),
        (GltfError::BufferFormatUnsupported, ErrorKind::BufferFormatUnsupported),
        (GltfError::InvalidImageMimeType("x".to_string()), ErrorKind::InvalidImageMimeType),
        (GltfError::ImageError("x".to_string()), ErrorKind::ImageError),
        (GltfError::AssetIoError("x".to_string()), ErrorKind::AssetIoError),
        (GltfError::MissingAnimationSampler(3), ErrorKind::MissingAnimationSampler),
        (GltfError::GenerateTangentsError("x".to_string()), ErrorKind::GenerateTangentsError),
    ];
    for (error, kind) in errors {
        assert_eq!(error.error_kind(), kind);
    }
}
