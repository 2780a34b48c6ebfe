use base64::engine::general_purpose::STANDARD;
use base64::Engine;
use fuse::error::FuseError;
use fuse::model::inference::{Image, ImageFormat, ImageMetadata};

fn encode_base64(data: &[u8]) -> String {
    STANDARD.encode(data)
}

#[test]
fn test_image_format_mime_type() {
    assert_eq!(ImageFormat::Png.mime_type(), "image/png");
    assert_eq!(ImageFormat::Jpg.mime_type(), "image/jpeg");
    assert_eq!(ImageFormat::Gif.mime_type(), "image/gif");
    assert_eq!(ImageFormat::WebP.mime_type(), "image/webp");
}

#[test]
fn test_image_format_from_extension() {
    assert_eq!(ImageFormat::from_extension("png"), Some(ImageFormat::Png));
    assert_eq!(ImageFormat::from_extension("PNG"), Some(ImageFormat::Png));
    assert_eq!(ImageFormat::from_extension("jpg"), Some(ImageFormat::Jpg));
    assert_eq!(ImageFormat::from_extension("jpeg"), Some(ImageFormat::Jpg));
    assert_eq!(ImageFormat::from_extension("gif"), Some(ImageFormat::Gif));
    assert_eq!(ImageFormat::from_extension("webp"), Some(ImageFormat::WebP));
    assert_eq!(ImageFormat::from_extension("bmp"), None);
}

#[test]
fn test_image_format_from_mime_type() {
    assert_eq!(ImageFormat::from_mime_type("image/png"), Some(ImageFormat::Png));
    assert_eq!(ImageFormat::from_mime_type("image/jpeg"), Some(ImageFormat::Jpg));
    assert_eq!(ImageFormat::from_mime_type("image/gif"), Some(ImageFormat::Gif));
    assert_eq!(ImageFormat::from_mime_type("image/webp"), Some(ImageFormat::WebP));
    assert_eq!(ImageFormat::from_mime_type("image/bmp"), None);
    assert_eq!(ImageFormat::from_mime_type("IMAGE/JPG"), Some(ImageFormat::Jpg));
}

#[test]
fn test_image_new() {
    let data = encode_base64(b"test image data");
    let image = Image::new(data.clone(), ImageFormat::Png);
    assert_eq!(image.data, data);
    assert_eq!(image.format, ImageFormat::Png);
    assert!(image.metadata.is_none());
}

#[test]
fn test_image_with_metadata() {
    let data = encode_base64(b"test image data");
    let metadata = ImageMetadata { width: Some(100), height: Some(100), size_bytes: Some(1024) };
    let image = Image::new(data, ImageFormat::Png).with_metadata(metadata.clone());
    assert!(image.metadata.is_some());
    let img_metadata = image.metadata.unwrap();
    assert_eq!(img_metadata.width, Some(100));
    assert_eq!(img_metadata.height, Some(100));
    assert_eq!(img_metadata.size_bytes, Some(1024));
}

#[test]
fn test_image_validate_success() {
    let image = Image::new(encode_base64(b"valid image data"), ImageFormat::Png);
    assert!(image.validate().is_ok());
}

#[test]
fn test_image_validate_invalid_base64() {
    let image = Image::new("not valid base64!!!".to_string(), ImageFormat::Png);
    let result = image.validate();
    assert!(result.is_err());
    assert!(matches!(result.unwrap_err(), FuseError::ValidationError(_)));
}

#[test]
fn test_image_validate_too_large() {
    let large_data = "A".repeat(11 * 1024 * 1024);
    let image = Image::new(large_data, ImageFormat::Png);
    let result = image.validate();
    assert!(result.is_err());
    assert!(matches!(result.unwrap_err(), FuseError::ValidationError(_)));
}

#[test]
fn validate_messages() {
    let bad = Image::new("%%%".to_string(), ImageFormat::Png);
    assert_eq!(bad.validate().unwrap_err().message(), "Image data is not valid base64");
    let big = Image::new("A".repeat(11 * 1024 * 1024), ImageFormat::Png);
    assert_eq!(big.validate().unwrap_err().message(), "Image data exceeds maximum size of 10MB");
}

#[test]
fn test_image_decode() {
    let original_data = b"test image data";
    let image = Image::new(encode_base64(original_data), ImageFormat::Png);
    let decoded = image.decode().unwrap();
    assert_eq!(decoded, original_data);
}

#[test]
fn decode_error_names_the_decoder_message() {
    let image = Image::new("@@".to_string(), ImageFormat::Png);
    let msg = image.decode().unwrap_err().message();
    assert!(msg.starts_with("Failed to decode image data: "));
}

#[test]
fn test_image_size_bytes() {
    let original_data = b"test image data";
    let image = Image::new(encode_base64(original_data), ImageFormat::Png);
    assert_eq!(image.size_bytes().unwrap(), original_data.len());
}

#[test]
fn test_image_preprocess() {
    let original_data = b"test image data";
    let image = Image::new(encode_base64(original_data), ImageFormat::Png);
    assert_eq!(image.preprocess().unwrap(), original_data);
}

#[test]
fn image_from_file_contents() {
    let image = Image::from_file_contents(b"fake png data", Some("png"), "/tmp/x.png").unwrap();
    assert_eq!(image.format, ImageFormat::Png);
    assert_eq!(image.metadata.as_ref().unwrap().size_bytes, Some(13));
    assert_eq!(image.decode().unwrap(), b"fake png data");
    let err = Image::from_file_contents(b"x", Some("bmp"), "/tmp/x.bmp").unwrap_err();
    assert_eq!(err.message(), "Unsupported image format for file: /tmp/x.bmp");
    assert!(Image::from_file_contents(b"x", None, "/tmp/x").is_err());
}

#[test]
fn image_from_file_decodes_to_the_file_contents() {
    let contents: Vec<u8> = (0u8..=255).collect();
    let image = Image::from_file_contents(&contents, Some("JPG"), "/tmp/a.JPG").unwrap();
    assert_eq!(image.decode().unwrap(), contents);
    assert_eq!(image.size_bytes().unwrap(), 256);
}
